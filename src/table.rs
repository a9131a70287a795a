use vstd::prelude::*;

use crate::path::MushroomPath;
use crate::value::{MushroomValue, ValueModel};

verus! {

/// One timestamped value at a path. The timestamp, when present, is in
/// microseconds of the server's clock.
#[derive(Debug, Clone, PartialEq)]
pub struct MushroomEntry {
    value: MushroomValue,
    path: MushroomPath,
    timestamp: Option<u64>,
}

pub struct EntryModel {
    pub value: ValueModel,
    pub path: Seq<Seq<char>>,
    pub timestamp: Option<u64>,
}

impl View for MushroomEntry {
    type V = EntryModel;

    closed spec fn view(&self) -> EntryModel {
        EntryModel { value: self.value@, path: self.path@, timestamp: self.timestamp }
    }
}

impl MushroomEntry {
    pub fn new(value: MushroomValue, path: MushroomPath, timestamp: Option<u64>) -> (r: MushroomEntry)
        ensures
            r@ == (EntryModel { value: value@, path: path@, timestamp }),
    {
        MushroomEntry { value, path, timestamp }
    }

    pub fn get_path(&self) -> (r: MushroomPath)
        ensures
            r@ == self@.path,
    {
        self.path.duplicate()
    }

    pub fn get_value(&self) -> (r: MushroomValue)
        ensures
            r@ == self@.value,
    {
        self.value.duplicate()
    }

    pub fn get_timestamp(&self) -> (r: Option<u64>)
        ensures
            r == self@.timestamp,
    {
        self.timestamp
    }

    /// A copy with the same content.
    pub fn duplicate(&self) -> (r: MushroomEntry)
        ensures
            r@ == self@,
    {
        MushroomEntry {
            value: self.value.duplicate(),
            path: self.path.duplicate(),
            timestamp: self.timestamp,
        }
    }

    fn has_path(&self, path: &MushroomPath) -> (r: bool)
        ensures
            r == (self@.path == path@),
    {
        self.path.same_path(path)
    }
}

pub open spec fn entries_view(v: Seq<MushroomEntry>) -> Seq<EntryModel> {
    v.map_values(|e: MushroomEntry| e@)
}

/// No two entries share a path.
pub open spec fn unique_paths(s: Seq<EntryModel>) -> bool {
    forall|i: int, j: int| 0 <= i < s.len() && 0 <= j < s.len() && i != j ==> s[i].path != s[j].path
}

pub open spec fn has_path(s: Seq<EntryModel>, p: Seq<Seq<char>>) -> bool {
    exists|i: int| 0 <= i < s.len() && s[i].path == p
}

pub open spec fn path_index(s: Seq<EntryModel>, p: Seq<Seq<char>>) -> int {
    choose|i: int| 0 <= i < s.len() && s[i].path == p
}

/// The entry at path `p`, if any.
pub open spec fn lookup(s: Seq<EntryModel>, p: Seq<Seq<char>>) -> Option<EntryModel> {
    if has_path(s, p) {
        Some(s[path_index(s, p)])
    } else {
        None
    }
}

/// Inserting `e`: it replaces the entry at its path in place, or is appended.
pub open spec fn upsert(s: Seq<EntryModel>, e: EntryModel) -> Seq<EntryModel> {
    if has_path(s, e.path) {
        s.update(path_index(s, e.path), e)
    } else {
        s.push(e)
    }
}

/// Inserting the entries of `b` into `a`, in order.
pub open spec fn merge_entries(a: Seq<EntryModel>, b: Seq<EntryModel>) -> Seq<EntryModel>
    decreases b.len(),
{
    if b.len() == 0 {
        a
    } else {
        upsert(merge_entries(a, b.drop_last()), b.last())
    }
}

pub struct TableModel {
    pub timestamp: u128,
    pub entries: Seq<EntryModel>,
}

/// Applying snapshot `b` onto `a`: every path of `b` is replaced or added,
/// paths only in `a` stay, and the timestamp becomes `b`'s.
pub open spec fn merge(a: TableModel, b: TableModel) -> TableModel {
    TableModel { timestamp: b.timestamp, entries: merge_entries(a.entries, b.entries) }
}

pub open spec fn empty_table(timestamp: u128) -> TableModel {
    TableModel { timestamp, entries: Seq::empty() }
}

proof fn lemma_index_unique(s: Seq<EntryModel>, i: int)
    requires
        unique_paths(s),
        0 <= i < s.len(),
    ensures
        has_path(s, s[i].path),
        path_index(s, s[i].path) == i,
{
    assert(0 <= i < s.len() && s[i].path == s[i].path);
}

pub proof fn lemma_upsert_unique(s: Seq<EntryModel>, e: EntryModel)
    requires
        unique_paths(s),
    ensures
        unique_paths(upsert(s, e)),
        has_path(upsert(s, e), e.path),
{
    if has_path(s, e.path) {
        let k = path_index(s, e.path);
        assert(upsert(s, e)[k] == e);
    } else {
        assert(upsert(s, e)[s.len() as int] == e);
    }
}

/// After an insertion the inserted entry is found at its path and every
/// other path reads as before.
pub proof fn lemma_lookup_upsert(s: Seq<EntryModel>, e: EntryModel, p: Seq<Seq<char>>)
    requires
        unique_paths(s),
    ensures
        lookup(upsert(s, e), p) == (if p == e.path { Some(e) } else { lookup(s, p) }),
{
    let u = upsert(s, e);
    lemma_upsert_unique(s, e);
    if has_path(s, e.path) {
        let k = path_index(s, e.path);
        if p == e.path {
            lemma_index_unique(u, k);
        } else if has_path(s, p) {
            let j = path_index(s, p);
            assert(j != k);
            assert(u[j] == s[j]);
            lemma_index_unique(u, j);
        } else {
            if has_path(u, p) {
                let j = path_index(u, p);
                assert(s[j].path == p);
            }
        }
    } else {
        let n = s.len() as int;
        if p == e.path {
            lemma_index_unique(u, n);
        } else if has_path(s, p) {
            let j = path_index(s, p);
            assert(u[j] == s[j]);
            lemma_index_unique(u, j);
        } else {
            if has_path(u, p) {
                let j = path_index(u, p);
                assert(j != n);
                assert(s[j].path == p);
            }
        }
    }
}

pub proof fn lemma_merge_unique(a: Seq<EntryModel>, b: Seq<EntryModel>)
    requires
        unique_paths(a),
    ensures
        unique_paths(merge_entries(a, b)),
    decreases b.len(),
{
    if b.len() > 0 {
        lemma_merge_unique(a, b.drop_last());
        lemma_upsert_unique(merge_entries(a, b.drop_last()), b.last());
    }
}

proof fn lemma_lookup_push(b: Seq<EntryModel>, x: EntryModel, p: Seq<Seq<char>>)
    requires
        unique_paths(b.push(x)),
    ensures
        unique_paths(b),
        lookup(b.push(x), p) == (if p == x.path { Some(x) } else { lookup(b, p) }),
{
    let c = b.push(x);
    assert forall|i: int, j: int| 0 <= i < b.len() && 0 <= j < b.len() && i != j implies b[i].path != b[j].path by {
        assert(c[i] == b[i] && c[j] == b[j]);
    }
    let n = b.len() as int;
    if p == x.path {
        lemma_index_unique(c, n);
    } else if has_path(b, p) {
        let j = path_index(b, p);
        assert(c[j] == b[j]);
        lemma_index_unique(c, j);
    } else if has_path(c, p) {
        let j = path_index(c, p);
        assert(j != n);
        assert(b[j].path == p);
    }
}

/// A path reads, after a merge, as in the incoming entries when they hold
/// it, and as before otherwise.
pub proof fn lemma_lookup_merge(a: Seq<EntryModel>, b: Seq<EntryModel>, p: Seq<Seq<char>>)
    requires
        unique_paths(a),
        unique_paths(b),
    ensures
        lookup(merge_entries(a, b), p) == (if lookup(b, p) is Some { lookup(b, p) } else { lookup(a, p) }),
    decreases b.len(),
{
    if b.len() == 0 {
        assert(!has_path(b, p));
    } else {
        let b0 = b.drop_last();
        let x = b.last();
        assert(b0.push(x) =~= b);
        lemma_lookup_push(b0, x, p);
        lemma_lookup_merge(a, b0, p);
        lemma_merge_unique(a, b0);
        lemma_lookup_upsert(merge_entries(a, b0), x, p);
    }
}

proof fn lemma_upsert_same_slot(m: Seq<EntryModel>, x: EntryModel, y: EntryModel)
    requires
        unique_paths(m),
        x.path == y.path,
    ensures
        has_path(upsert(m, y), x.path),
        upsert(m, x) == upsert(m, y).update(path_index(upsert(m, y), x.path), x),
{
    lemma_upsert_unique(m, y);
    if has_path(m, x.path) {
        let k = path_index(m, x.path);
        lemma_index_unique(upsert(m, y), k);
        assert(m.update(k, y).update(k, x) =~= m.update(k, x));
    } else {
        let n = m.len() as int;
        lemma_index_unique(upsert(m, y), n);
        assert(m.push(y).update(n, x) =~= m.push(x));
    }
}

proof fn lemma_upsert_after_update(m: Seq<EntryModel>, j: int, x: EntryModel, z: EntryModel)
    requires
        unique_paths(m),
        0 <= j < m.len(),
        m[j].path == x.path,
        z.path != x.path,
    ensures
        upsert(m.update(j, x), z) == upsert(m, z).update(j, x),
        0 <= j < upsert(m, z).len(),
        upsert(m, z)[j].path == x.path,
{
    let m2 = m.update(j, x);
    assert forall|i: int, k: int| 0 <= i < m2.len() && 0 <= k < m2.len() && i != k implies m2[i].path != m2[k].path by {
        assert(m2[i].path == m[i].path && m2[k].path == m[k].path);
    }
    if has_path(m, z.path) {
        let q = path_index(m, z.path);
        assert(q != j);
        assert(m2[q] == m[q]);
        lemma_index_unique(m2, q);
        assert(m2.update(q, z) =~= m.update(q, z).update(j, x));
    } else {
        if has_path(m2, z.path) {
            let q = path_index(m2, z.path);
            assert(q != j);
            assert(m[q].path == z.path);
        }
        assert(m2.push(z) =~= m.push(z).update(j, x));
    }
}

proof fn lemma_merge_update(a: Seq<EntryModel>, s: Seq<EntryModel>, k: int, x: EntryModel)
    requires
        unique_paths(a),
        unique_paths(s),
        0 <= k < s.len(),
        s[k].path == x.path,
    ensures
        has_path(merge_entries(a, s), x.path),
        merge_entries(a, s.update(k, x)) == merge_entries(a, s).update(path_index(merge_entries(a, s), x.path), x),
    decreases s.len(),
{
    let n = s.len() - 1;
    let s0 = s.drop_last();
    let z = s.last();
    let m0 = merge_entries(a, s0);
    assert(s0.push(z) =~= s);
    lemma_lookup_push(s0, z, x.path);
    lemma_merge_unique(a, s0);
    lemma_index_unique(s, k);
    lemma_lookup_merge(a, s, x.path);
    let t = s.update(k, x);
    if k == n {
        assert(t.drop_last() =~= s0);
        assert(t.last() == x);
        lemma_upsert_same_slot(m0, x, z);
    } else {
        assert(t.drop_last() =~= s0.update(k, x));
        assert(t.last() == z);
        assert(s[n].path != s[k].path);
        lemma_merge_update(a, s0, k, x);
        let j = path_index(m0, x.path);
        lemma_upsert_after_update(m0, j, x, z);
        lemma_upsert_unique(m0, z);
        lemma_index_unique(upsert(m0, z), j);
    }
}

proof fn lemma_merge_upsert(a: Seq<EntryModel>, s: Seq<EntryModel>, x: EntryModel)
    requires
        unique_paths(a),
        unique_paths(s),
    ensures
        merge_entries(a, upsert(s, x)) == upsert(merge_entries(a, s), x),
{
    if has_path(s, x.path) {
        let k = path_index(s, x.path);
        lemma_merge_update(a, s, k, x);
    } else {
        assert(s.push(x).drop_last() =~= s);
    }
}

/// Merging entries is associative.
pub proof fn lemma_merge_entries_associative(a: Seq<EntryModel>, b: Seq<EntryModel>, c: Seq<EntryModel>)
    requires
        unique_paths(a),
        unique_paths(b),
        unique_paths(c),
    ensures
        merge_entries(merge_entries(a, b), c) == merge_entries(a, merge_entries(b, c)),
    decreases c.len(),
{
    if c.len() > 0 {
        let c0 = c.drop_last();
        let x = c.last();
        assert(c0.push(x) =~= c);
        lemma_lookup_push(c0, x, x.path);
        lemma_merge_entries_associative(a, b, c0);
        lemma_merge_unique(b, c0);
        lemma_merge_upsert(a, merge_entries(b, c0), x);
    }
}

/// Merging snapshots is associative: merging `b` then `c` into `a` is
/// merging into `a` the merge of `c` into `b`. It is right-biased: a path
/// that `c` holds reads as in `c`, else one that `b` holds reads as in `b`,
/// and the timestamp is `c`'s.
pub proof fn lemma_merge_associative(a: TableModel, b: TableModel, c: TableModel, p: Seq<Seq<char>>)
    requires
        unique_paths(a.entries),
        unique_paths(b.entries),
        unique_paths(c.entries),
    ensures
        merge(merge(a, b), c) == merge(a, merge(b, c)),
        lookup(merge(merge(a, b), c).entries, p) == (if lookup(c.entries, p) is Some {
            lookup(c.entries, p)
        } else if lookup(b.entries, p) is Some {
            lookup(b.entries, p)
        } else {
            lookup(a.entries, p)
        }),
        merge(merge(a, b), c).timestamp == c.timestamp,
{
    lemma_merge_entries_associative(a.entries, b.entries, c.entries);
    lemma_merge_unique(a.entries, b.entries);
    lemma_lookup_merge(merge_entries(a.entries, b.entries), c.entries, p);
    lemma_lookup_merge(a.entries, b.entries, p);
}

/// Merging an empty snapshot leaves the entries as they are; the timestamp
/// after a merge is always the incoming snapshot's.
pub proof fn lemma_merge_empty(a: TableModel, b: TableModel)
    requires
        b.entries.len() == 0,
    ensures
        merge(a, b) == (TableModel { timestamp: b.timestamp, entries: a.entries }),
{
}

/// Two entries inserted one after the other at the same path into an empty
/// table leave one entry: the second.
pub proof fn lemma_insert_same_path(e1: EntryModel, e2: EntryModel)
    requires
        e1.path == e2.path,
    ensures
        upsert(upsert(Seq::empty(), e1), e2) == seq![e2],
{
    let s = upsert(Seq::empty(), e1);
    assert(!has_path(Seq::<EntryModel>::empty(), e1.path));
    assert(s == seq![e1]);
    assert(s[0].path == e2.path);
    lemma_index_unique(s, 0);
    assert(s.update(0, e2) =~= seq![e2]);
}

/// A snapshot of table state: entries with unique paths, kept in the order
/// in which their paths first arrived, under one timestamp in microseconds.
#[derive(Debug, Clone)]
pub struct MushroomTable {
    timestamp: u128,
    entries: Vec<MushroomEntry>,
}

impl View for MushroomTable {
    type V = TableModel;

    closed spec fn view(&self) -> TableModel {
        TableModel { timestamp: self.timestamp, entries: entries_view(self.entries@) }
    }
}

impl MushroomTable {
    /// Well-formed: no two entries share a path.
    pub closed spec fn wf(&self) -> bool {
        unique_paths(entries_view(self.entries@))
    }

    /// A well-formed table holds at most one entry per path.
    pub proof fn lemma_wf_unique(&self)
        requires
            self.wf(),
        ensures
            unique_paths(self@.entries),
    {
    }

    pub fn new(timestamp: u128) -> (r: MushroomTable)
        ensures
            r.wf(),
            r@ == empty_table(timestamp),
    {
        let r = MushroomTable { timestamp, entries: Vec::new() };
        assert(entries_view(r.entries@) =~= Seq::<EntryModel>::empty());
        r
    }

    /// A table holding `entries` inserted in order: a later entry at a path
    /// replaces an earlier one.
    pub fn new_from_entries(timestamp: u128, entries: Vec<MushroomEntry>) -> (r: MushroomTable)
        ensures
            r.wf(),
            r@ == merge(empty_table(timestamp), TableModel { timestamp, entries: entries_view(entries@) }),
    {
        let mut r = MushroomTable::new(timestamp);
        let mut i: usize = 0;
        assert(entries_view(entries@).take(0) =~= Seq::<EntryModel>::empty());
        while i < entries.len()
            invariant
                i <= entries@.len(),
                r.wf(),
                r@ == (TableModel {
                    timestamp,
                    entries: merge_entries(Seq::empty(), entries_view(entries@).take(i as int)),
                }),
            decreases entries@.len() - i,
        {
            r.add_entry(entries[i].duplicate());
            proof {
                let b = entries_view(entries@);
                assert(b.take(i + 1).drop_last() =~= b.take(i as int));
            }
            i += 1;
        }
        assert(entries_view(entries@).take(i as int) =~= entries_view(entries@));
        r
    }

    fn find(&self, path: &MushroomPath) -> (r: Option<usize>)
        requires
            self.wf(),
        ensures
            r is Some <==> has_path(self@.entries, path@),
            r is Some ==> r->Some_0 == path_index(self@.entries, path@),
            r is Some ==> r->Some_0 < self@.entries.len(),
    {
        let mut i: usize = 0;
        while i < self.entries.len()
            invariant
                i <= self.entries@.len(),
                self.wf(),
                forall|k: int| 0 <= k < i ==> self@.entries[k].path != path@,
            decreases self.entries@.len() - i,
        {
            if self.entries[i].has_path(path) {
                proof {
                    lemma_index_unique(self@.entries, i as int);
                }
                return Some(i);
            }
            i += 1;
        }
        None
    }

    /// Inserts `entry`, replacing in place the entry at its path if there is
    /// one, else appending it.
    pub fn add_entry(&mut self, entry: MushroomEntry)
        requires
            old(self).wf(),
        ensures
            final(self).wf(),
            final(self)@ == (TableModel {
                timestamp: old(self)@.timestamp,
                entries: upsert(old(self)@.entries, entry@),
            }),
    {
        proof {
            lemma_upsert_unique(self@.entries, entry@);
        }
        let found = self.find(&entry.path);
        match found {
            Some(i) => {
                self.entries.set(i, entry);
                assert(entries_view(self.entries@) =~= upsert(old(self)@.entries, entry@));
            },
            None => {
                self.entries.push(entry);
                assert(entries_view(self.entries@) =~= upsert(old(self)@.entries, entry@));
            },
        }
    }

    pub fn get_entry(&self, path: &MushroomPath) -> (r: Option<MushroomEntry>)
        requires
            self.wf(),
        ensures
            r is Some <==> lookup(self@.entries, path@) is Some,
            r is Some ==> r->Some_0@ == lookup(self@.entries, path@)->Some_0,
    {
        match self.find(path) {
            Some(i) => Some(self.entries[i].duplicate()),
            None => None,
        }
    }

    pub fn get_entries(&self) -> (r: &Vec<MushroomEntry>)
        ensures
            entries_view(r@) == self@.entries,
    {
        &self.entries
    }

    pub fn get_timestamp(&self) -> (r: u128)
        ensures
            r == self@.timestamp,
    {
        self.timestamp
    }

    pub fn has_entry(&self, path: &MushroomPath) -> (r: bool)
        requires
            self.wf(),
        ensures
            r == has_path(self@.entries, path@),
    {
        self.find(path).is_some()
    }

    pub fn is_empty(&self) -> (r: bool)
        ensures
            r == (self@.entries.len() == 0),
    {
        self.entries.len() == 0
    }

    pub fn len(&self) -> (r: usize)
        ensures
            r == self@.entries.len(),
    {
        self.entries.len()
    }

    /// Inserts every entry of `other`, in order; the timestamp stays.
    pub fn update_entries(&mut self, other: &MushroomTable)
        requires
            old(self).wf(),
        ensures
            final(self).wf(),
            final(self)@ == (TableModel {
                timestamp: old(self)@.timestamp,
                entries: merge_entries(old(self)@.entries, other@.entries),
            }),
    {
        let ghost start = self@.entries;
        let mut i: usize = 0;
        assert(other@.entries.take(0) =~= Seq::<EntryModel>::empty());
        while i < other.entries.len()
            invariant
                i <= other.entries@.len(),
                self.wf(),
                self@.timestamp == old(self)@.timestamp,
                start == old(self)@.entries,
                self@.entries == merge_entries(start, other@.entries.take(i as int)),
            decreases other.entries@.len() - i,
        {
            self.add_entry(other.entries[i].duplicate());
            proof {
                let b = other@.entries;
                assert(b.take(i + 1).drop_last() =~= b.take(i as int));
            }
            i += 1;
        }
        assert(other@.entries.take(i as int) =~= other@.entries);
    }

    /// Takes `other`'s timestamp; the entries stay.
    pub fn update_timestamp(&mut self, other: &MushroomTable)
        requires
            old(self).wf(),
        ensures
            final(self).wf(),
            final(self)@ == (TableModel { timestamp: other@.timestamp, entries: old(self)@.entries }),
    {
        self.timestamp = other.timestamp;
    }

    /// Merges `other` into this table.
    pub fn update_all(&mut self, other: &MushroomTable)
        requires
            old(self).wf(),
        ensures
            final(self).wf(),
            final(self)@ == merge(old(self)@, other@),
    {
        self.update_entries(other);
        self.update_timestamp(other);
    }

    /// A copy with the same content.
    pub fn duplicate(&self) -> (r: MushroomTable)
        requires
            self.wf(),
        ensures
            r.wf(),
            r@ == self@,
    {
        let mut entries: Vec<MushroomEntry> = Vec::new();
        let mut i: usize = 0;
        while i < self.entries.len()
            invariant
                i <= self.entries@.len(),
                self.wf(),
                entries_view(entries@) == self@.entries.take(i as int),
            decreases self.entries@.len() - i,
        {
            let d = self.entries[i].duplicate();
            let ghost before = entries@;
            entries.push(d);
            assert(entries_view(before.push(d)) =~= entries_view(before).push(d@));
            assert(entries_view(entries@) =~= self@.entries.take(i + 1));
            i += 1;
        }
        assert(self@.entries.take(i as int) =~= self@.entries);
        MushroomTable { timestamp: self.timestamp, entries }
    }
}

} // verus!
