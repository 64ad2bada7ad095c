//! The catalog's records for one location, the query that selects the files
//! still lacking a checksum, and the checksum update.
use vstd::prelude::*;
use crate::path::{is_prefix, starts_with};

verus! {

/// One tracked filesystem entry.
#[derive(Debug, Clone, PartialEq, Eq)]
pub struct FilePathRecord {
    pub id: u64,
    pub location_id: i32,
    /// The path of the parent directory, `/` first and `/` last (`/dir/`).
    pub materialized_path: String,
    /// The entry's name, extension included.
    pub name: String,
    pub is_dir: bool,
    /// `None` until a checksum has been computed.
    pub integrity_checksum: Option<String>,
}

/// The records that the catalog holds, in the order its queries return them.
#[derive(Debug)]
pub struct Catalog {
    pub records: Vec<FilePathRecord>,
}

pub fn copy_text(s: &Option<String>) -> (r: Option<String>)
    ensures
        r == *s,
{
    match s {
        Some(t) => Some(t.clone()),
        None => None,
    }
}

impl FilePathRecord {
    pub fn duplicate(&self) -> (r: FilePathRecord)
        ensures
            r == *self,
    {
        FilePathRecord {
            id: self.id,
            location_id: self.location_id,
            materialized_path: self.materialized_path.clone(),
            name: self.name.clone(),
            is_dir: self.is_dir,
            integrity_checksum: copy_text(&self.integrity_checksum),
        }
    }
}

/// The path of a record followed by `/`: what its children's materialized
/// path is when it is a directory.
pub open spec fn entry_children_prefix(r: FilePathRecord) -> Seq<char> {
    r.materialized_path@ + r.name@ + seq!['/']
}

/// A record that the planner queues: a file of the location, without a
/// checksum, and (when scoped) below the scope's directory.
pub open spec fn is_candidate(r: FilePathRecord, location_id: i32, scope: Option<Seq<char>>) -> bool {
    &&& r.location_id == location_id
    &&& !r.is_dir
    &&& r.integrity_checksum is None
    &&& match scope {
        None => true,
        Some(p) => is_prefix(p, r.materialized_path@),
    }
}

/// The candidates among `recs`, in catalog order.
pub open spec fn select(recs: Seq<FilePathRecord>, location_id: i32, scope: Option<Seq<char>>) -> Seq<
    FilePathRecord,
>
    decreases recs.len(),
{
    if recs.len() == 0 {
        Seq::empty()
    } else {
        let rest = select(recs.drop_last(), location_id, scope);
        if is_candidate(recs.last(), location_id, scope) {
            rest.push(recs.last())
        } else {
            rest
        }
    }
}

/// Whether the location holds an entry with this children prefix, and
/// whether one such entry is a directory.
pub open spec fn entry_exists(recs: Seq<FilePathRecord>, location_id: i32, prefix: Seq<char>) -> bool {
    exists|i: int|
        0 <= i < recs.len() && #[trigger] recs[i].location_id == location_id
            && entry_children_prefix(recs[i]) == prefix
}

pub open spec fn dir_exists(recs: Seq<FilePathRecord>, location_id: i32, prefix: Seq<char>) -> bool {
    exists|i: int|
        0 <= i < recs.len() && #[trigger] recs[i].location_id == location_id
            && entry_children_prefix(recs[i]) == prefix && recs[i].is_dir
}

/// Whether some record with this identifier already has a checksum.
pub open spec fn has_checksum(recs: Seq<FilePathRecord>, id: u64) -> bool {
    exists|i: int| 0 <= i < recs.len() && #[trigger] recs[i].id == id && recs[i].integrity_checksum is Some
}

pub open spec fn with_checksum(r: FilePathRecord, id: u64, sum: String) -> FilePathRecord {
    if r.id == id {
        FilePathRecord {
            id: r.id,
            location_id: r.location_id,
            materialized_path: r.materialized_path,
            name: r.name,
            is_dir: r.is_dir,
            integrity_checksum: Some(sum),
        }
    } else {
        r
    }
}

/// The records after the checksum of record `id` is set to `sum`.
pub open spec fn set_checksum(recs: Seq<FilePathRecord>, id: u64, sum: String) -> Seq<FilePathRecord> {
    recs.map_values(|r: FilePathRecord| with_checksum(r, id, sum))
}

/// No two records share an identifier.
pub open spec fn ids_unique(recs: Seq<FilePathRecord>) -> bool {
    forall|i: int, j: int|
        0 <= i < recs.len() && 0 <= j < recs.len() && #[trigger] recs[i].id == #[trigger] recs[j].id
            ==> i == j
}

pub open spec fn scope_view(scope: Option<String>) -> Option<Seq<char>> {
    match scope {
        None => None,
        Some(p) => Some(p@),
    }
}

impl Catalog {
    /// The files of the location without a checksum, under `scope` (a
    /// children prefix) when one is given, in catalog order.
    pub fn find_unchecksummed(&self, location_id: i32, scope: &Option<String>) -> (r: Vec<FilePathRecord>)
        ensures
            r@ == select(self.records@, location_id, scope_view(*scope)),
    {
        let mut out: Vec<FilePathRecord> = Vec::new();
        let mut i: usize = 0;
        assert(self.records@.take(0) =~= Seq::<FilePathRecord>::empty());
        while i < self.records.len()
            invariant
                i <= self.records.len(),
                out@ == select(self.records@.take(i as int), location_id, scope_view(*scope)),
            decreases self.records.len() - i,
        {
            let r = &self.records[i];
            let in_scope = match scope {
                None => true,
                Some(p) => starts_with(&r.materialized_path, p),
            };
            assert(self.records@.take(i + 1).drop_last() =~= self.records@.take(i as int));
            if r.location_id == location_id && !r.is_dir && r.integrity_checksum.is_none() && in_scope {
                out.push(r.duplicate());
            }
            i = i + 1;
        }
        assert(self.records@.take(self.records.len() as int) =~= self.records@);
        out
    }

    /// Looks up the entry whose children prefix is `prefix`: `Some(true)`
    /// when a directory has it, `Some(false)` when only other entries do.
    pub fn find_entry(&self, location_id: i32, prefix: &String) -> (r: Option<bool>)
        ensures
            r == if dir_exists(self.records@, location_id, prefix@) {
                Some(true)
            } else if entry_exists(self.records@, location_id, prefix@) {
                Some(false)
            } else {
                None::<bool>
            },
    {
        let mut found: Option<bool> = None;
        let mut i: usize = 0;
        while i < self.records.len()
            invariant
                i <= self.records.len(),
                found == if dir_exists(self.records@.take(i as int), location_id, prefix@) {
                    Some(true)
                } else if entry_exists(self.records@.take(i as int), location_id, prefix@) {
                    Some(false)
                } else {
                    None::<bool>
                },
            decreases self.records.len() - i,
        {
            let r = &self.records[i];
            let key = r.materialized_path.clone().concat(r.name.as_str()).concat("/");
            proof {
                reveal_strlit("/");
            }
            let ghost prev = self.records@.take(i as int);
            let ghost next = self.records@.take(i + 1);
            assert(next[i as int] == self.records@[i as int]);
            assert(key@ == entry_children_prefix(self.records@[i as int]));
            assert forall|k: int| 0 <= k < prev.len() implies next[k] == prev[k] by {}
            if r.location_id == location_id && key == *prefix {
                if r.is_dir {
                    found = Some(true);
                    assert(next[i as int].location_id == location_id);
                    assert(dir_exists(next, location_id, prefix@));
                } else {
                    proof {
                        if dir_exists(next, location_id, prefix@) {
                            let k = choose|k: int|
                                0 <= k < next.len() && #[trigger] next[k].location_id == location_id
                                    && entry_children_prefix(next[k]) == prefix@ && next[k].is_dir;
                            assert(k < i);
                            assert(prev[k] == next[k]);
                            assert(dir_exists(prev, location_id, prefix@));
                        }
                    }
                    match found {
                        Some(true) => {},
                        _ => { found = Some(false); },
                    }
                    assert(next[i as int].location_id == location_id);
                    assert(entry_exists(next, location_id, prefix@));
                }
            } else {
                proof {
                    if entry_exists(next, location_id, prefix@) {
                        let k = choose|k: int|
                            0 <= k < next.len() && #[trigger] next[k].location_id == location_id
                                && entry_children_prefix(next[k]) == prefix@;
                        assert(k < i);
                        assert(prev[k] == next[k]);
                        assert(prev[k].location_id == location_id);
                    }
                    if dir_exists(next, location_id, prefix@) {
                        let k = choose|k: int|
                            0 <= k < next.len() && #[trigger] next[k].location_id == location_id
                                && entry_children_prefix(next[k]) == prefix@ && next[k].is_dir;
                        assert(k < i);
                        assert(prev[k] == next[k]);
                        assert(prev[k].location_id == location_id);
                    }
                    if entry_exists(prev, location_id, prefix@) {
                        let k = choose|k: int|
                            0 <= k < prev.len() && #[trigger] prev[k].location_id == location_id
                                && entry_children_prefix(prev[k]) == prefix@;
                        assert(next[k].location_id == location_id);
                    }
                    if dir_exists(prev, location_id, prefix@) {
                        let k = choose|k: int|
                            0 <= k < prev.len() && #[trigger] prev[k].location_id == location_id
                                && entry_children_prefix(prev[k]) == prefix@ && prev[k].is_dir;
                        assert(next[k].location_id == location_id);
                    }
                }
            }
            i = i + 1;
        }
        assert(self.records@.take(self.records.len() as int) =~= self.records@);
        found
    }

    /// Whether a record with this identifier already has a checksum.
    pub fn checksum_present(&self, id: u64) -> (r: bool)
        ensures
            r == has_checksum(self.records@, id),
    {
        let mut i: usize = 0;
        while i < self.records.len()
            invariant
                i <= self.records.len(),
                forall|k: int| 0 <= k < i ==> !(#[trigger] self.records@[k].id == id && self.records@[k].integrity_checksum is Some),
            decreases self.records.len() - i,
        {
            if self.records[i].id == id && self.records[i].integrity_checksum.is_some() {
                return true;
            }
            i = i + 1;
        }
        false
    }

    /// Sets the checksum of the record with identifier `id`.
    pub fn set_checksum(&mut self, id: u64, sum: &String)
        ensures
            final(self).records@ == set_checksum(old(self).records@, id, *sum),
    {
        let mut i: usize = 0;
        while i < self.records.len()
            invariant
                i <= self.records.len(),
                self.records@.len() == old(self).records@.len(),
                forall|k: int| 0 <= k < i ==> #[trigger] self.records@[k] == with_checksum(old(self).records@[k], id, *sum),
                forall|k: int| i <= k < self.records@.len() ==> #[trigger] self.records@[k] == old(self).records@[k],
            decreases self.records.len() - i,
        {
            if self.records[i].id == id {
                let mut r = self.records[i].duplicate();
                r.integrity_checksum = Some(sum.clone());
                self.records.set(i, r);
            }
            i = i + 1;
        }
        assert(self.records@ =~= set_checksum(old(self).records@, id, *sum));
    }
}

} // verus!
