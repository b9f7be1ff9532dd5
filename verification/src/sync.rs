//! Planning a one-way directory synchronisation: the files of the source and
//! of the replica are indexed by cleaned relative path, and the plan lists the
//! files to copy into the replica and the files to delete from it.

use crate::text::views;
use vstd::prelude::*;

verus! {

/// A modification time: a distance from the Unix epoch, after it or before it.
#[derive(Clone, Copy, Debug, PartialEq, Eq, Structural)]
pub struct Timestamp {
    pub before_epoch: bool,
    pub secs: u64,
    pub nanos: u32,
}

/// What the synchroniser compares of a file: its size in bytes and its
/// modification time.
#[derive(Clone, Copy, Debug, PartialEq, Eq, Structural)]
pub struct FileMeta {
    pub len: u64,
    pub modified: Timestamp,
}

/// A regular file found under a directory: its path relative to that
/// directory and its metadata.
pub struct FileRecord {
    pub path: String,
    pub meta: FileMeta,
}

/// What `path_clean::clean` makes of a path: `.` elements and repeated
/// separators removed, `name/..` pairs resolved, `..` after the root dropped,
/// and `.` for what would be empty.
pub uninterp spec fn cleaned_path(path: Seq<char>) -> Seq<char>;

/// `path_clean::clean` on a UTF-8 path. Its result is named `cleaned_path`; it
/// is never empty, since the function returns `.` in place of an empty path.
#[verifier::external_body]
pub(crate) fn clean_path(path: &str) -> (r: String)
    ensures
        r@ == cleaned_path(path@),
        r@.len() > 0,
{
    path_clean::clean(path).to_string_lossy().into_owned()
}

/// No two records share a path.
pub open spec fn paths_distinct(s: Seq<FileRecord>) -> bool {
    forall|i: int, j: int|
        0 <= i < s.len() && 0 <= j < s.len() && i != j ==> #[trigger] s[i].path@
            != #[trigger] s[j].path@
}

/// The map from path to metadata that a sequence of records describes; a
/// later record for a path overrides an earlier one.
pub open spec fn records_map(s: Seq<FileRecord>) -> Map<Seq<char>, FileMeta>
    decreases s.len(),
{
    if s.len() == 0 {
        Map::empty()
    } else {
        records_map(s.drop_last()).insert(s.last().path@, s.last().meta)
    }
}

/// The paths that `records_map` holds are those of the records; with distinct
/// paths, each record's metadata is what the map holds for its path, and the
/// map has one entry per record.
pub proof fn lemma_records_map(s: Seq<FileRecord>)
    ensures
        forall|p: Seq<char>|
            #[trigger] records_map(s).contains_key(p) <==> exists|i: int|
                0 <= i < s.len() && s[i].path@ == p,
        records_map(s).dom().finite(),
        paths_distinct(s) ==> forall|i: int|
            0 <= i < s.len() ==> records_map(s)[#[trigger] s[i].path@] == s[i].meta,
        paths_distinct(s) ==> records_map(s).dom().len() == s.len(),
    decreases s.len(),
{
    if s.len() > 0 {
        let t = s.drop_last();
        lemma_records_map(t);
        assert forall|p: Seq<char>|
            #[trigger] records_map(s).contains_key(p) implies exists|i: int|
                0 <= i < s.len() && s[i].path@ == p by {
            if p != s.last().path@ {
                let i = choose|i: int| 0 <= i < t.len() && t[i].path@ == p;
                assert(s[i] == t[i]);
            }
        }
        assert forall|p: Seq<char>|
            (exists|i: int| 0 <= i < s.len() && s[i].path@ == p) implies #[trigger] records_map(
            s,
        ).contains_key(p) by {
            let i = choose|i: int| 0 <= i < s.len() && s[i].path@ == p;
            if i < s.len() - 1 {
                assert(t[i] == s[i]);
            }
        }
        if paths_distinct(s) {
            assert(paths_distinct(t)) by {
                assert forall|i: int, j: int|
                    0 <= i < t.len() && 0 <= j < t.len() && i != j implies #[trigger] t[i].path@
                    != #[trigger] t[j].path@ by {
                    assert(t[i] == s[i] && t[j] == s[j]);
                }
            }
            assert forall|i: int| 0 <= i < s.len() implies records_map(s)[#[trigger] s[i].path@]
                == s[i].meta by {
                if i < s.len() - 1 {
                    assert(t[i] == s[i]);
                    assert(s[i].path@ != s[s.len() - 1].path@);
                }
            }
            assert(!records_map(t).contains_key(s.last().path@)) by {
                if records_map(t).contains_key(s.last().path@) {
                    let i = choose|i: int| 0 <= i < t.len() && t[i].path@ == s.last().path@;
                    assert(t[i] == s[i]);
                    assert(s[i].path@ != s[s.len() - 1].path@);
                }
            }
        }
    }
}

/// The files of one directory tree, indexed by path.
pub struct FileIndex {
    entries: Vec<FileRecord>,
}

impl View for FileIndex {
    type V = Map<Seq<char>, FileMeta>;

    closed spec fn view(&self) -> Map<Seq<char>, FileMeta> {
        records_map(self.entries@)
    }
}

impl FileIndex {
    #[verifier::type_invariant]
    closed spec fn distinct_paths(self) -> bool {
        paths_distinct(self.entries@)
    }

    /// An empty index.
    pub fn new() -> (idx: FileIndex)
        ensures
            idx@ == Map::<Seq<char>, FileMeta>::empty(),
    {
        FileIndex { entries: Vec::new() }
    }

    /// Records `meta` for `path`, replacing what was there for it.
    pub fn insert(&mut self, path: String, meta: FileMeta)
        ensures
            final(self)@ == old(self)@.insert(path@, meta),
    {
        proof {
            use_type_invariant(&*self);
        }
        let mut entries: Vec<FileRecord> = Vec::new();
        std::mem::swap(&mut entries, &mut self.entries);
        let ghost before = entries@;
        proof {
            lemma_records_map(before);
        }
        let n = entries.len();
        let mut i: usize = 0;
        let mut found = false;
        while i < n && !found
            invariant
                entries@ == before,
                n == before.len(),
                i <= n,
                found ==> i < n && before[i as int].path@ == path@,
                !found ==> forall|k: int| 0 <= k < i ==> #[trigger] before[k].path@ != path@,
            decreases n - i + (if found { 0int } else { 1int }),
        {
            if entries[i].path == path {
                found = true;
            } else {
                i = i + 1;
            }
        }
        if found {
            let ghost old_rec = before[i as int];
            entries.set(i, FileRecord { path, meta });
            proof {
                let after = entries@;
                assert(paths_distinct(after)) by {
                    assert forall|a: int, b: int|
                        0 <= a < after.len() && 0 <= b < after.len() && a != b implies #[trigger] after[a].path@
                        != #[trigger] after[b].path@ by {
                        if a != i && b != i {
                            assert(after[a] == before[a] && after[b] == before[b]);
                        } else if a == i {
                            assert(after[b] == before[b]);
                        } else {
                            assert(after[a] == before[a]);
                        }
                    }
                }
                lemma_records_map(after);
                assert(records_map(after) =~= records_map(before).insert(old_rec.path@, meta)) by {
                    assert forall|p: Seq<char>|
                        records_map(after).contains_key(p) <==> records_map(before).insert(
                            old_rec.path@,
                            meta,
                        ).contains_key(p) by {
                        if records_map(after).contains_key(p) {
                            let k = choose|k: int| 0 <= k < after.len() && after[k].path@ == p;
                            if k != i {
                                assert(after[k] == before[k]);
                            }
                        }
                        if records_map(before).contains_key(p) {
                            let k = choose|k: int| 0 <= k < before.len() && before[k].path@ == p;
                            if k != i {
                                assert(after[k] == before[k]);
                            }
                        }
                    }
                    assert forall|p: Seq<char>| #[trigger]
                        records_map(after).contains_key(p) implies records_map(after)[p]
                        == records_map(before).insert(old_rec.path@, meta)[p] by {
                        let k = choose|k: int| 0 <= k < after.len() && after[k].path@ == p;
                        if k != i {
                            assert(after[k] == before[k]);
                        }
                    }
                }
            }
        } else {
            entries.push(FileRecord { path, meta });
            proof {
                let after = entries@;
                assert(after.drop_last() =~= before);
                assert(paths_distinct(after)) by {
                    assert forall|a: int, b: int|
                        0 <= a < after.len() && 0 <= b < after.len() && a != b implies #[trigger] after[a].path@
                        != #[trigger] after[b].path@ by {
                        if a < n && b < n {
                            assert(after[a] == before[a] && after[b] == before[b]);
                        } else if a == n {
                            assert(after[b] == before[b]);
                        } else {
                            assert(after[a] == before[a]);
                        }
                    }
                }
            }
        }
        self.entries = entries;
    }

    /// The metadata recorded for `path`, if any.
    pub fn get(&self, path: &String) -> (r: Option<FileMeta>)
        ensures
            r == (if self@.contains_key(path@) {
                Some(self@[path@])
            } else {
                None
            }),
    {
        proof {
            use_type_invariant(self);
            lemma_records_map(self.entries@);
        }
        let n = self.entries.len();
        let mut i: usize = 0;
        while i < n
            invariant
                n == self.entries@.len(),
                i <= n,
                paths_distinct(self.entries@),
                forall|k: int| 0 <= k < i ==> #[trigger] self.entries@[k].path@ != path@,
            decreases n - i,
        {
            if self.entries[i].path == *path {
                proof {
                    lemma_records_map(self.entries@);
                    assert(records_map(self.entries@)[self.entries@[i as int].path@]
                        == self.entries@[i as int].meta);
                }
                return Some(self.entries[i].meta);
            }
            i = i + 1;
        }
        None
    }

    /// The number of files indexed.
    pub fn len(&self) -> (n: usize)
        ensures
            n == self@.len(),
    {
        proof {
            use_type_invariant(self);
            lemma_records_map(self.entries@);
        }
        self.entries.len()
    }

    /// The indexed files, one record per path, in no particular order.
    pub fn records(&self) -> (r: &Vec<FileRecord>)
        ensures
            records_map(r@) == self@,
            paths_distinct(r@),
            r@.len() == self@.len(),
    {
        proof {
            use_type_invariant(self);
            lemma_records_map(self.entries@);
        }
        &self.entries
    }
}

/// The index that `index_files` builds from `records`: each record under its
/// cleaned path, a later record overriding an earlier one with the same
/// cleaned path.
pub open spec fn indexed(records: Seq<FileRecord>) -> Map<Seq<char>, FileMeta>
    decreases records.len(),
{
    if records.len() == 0 {
        Map::empty()
    } else {
        indexed(records.drop_last()).insert(
            cleaned_path(records.last().path@),
            records.last().meta,
        )
    }
}

/// Indexing keeps every record, whatever its size or time: the index holds
/// exactly the cleaned paths of the records, and each cleaned path maps to the
/// metadata of the last record that cleans to it.
pub proof fn lemma_index_keeps_every_record(records: Seq<FileRecord>)
    ensures
        forall|p: Seq<char>|
            #[trigger] indexed(records).contains_key(p) <==> exists|i: int|
                0 <= i < records.len() && cleaned_path(records[i].path@) == p,
        forall|i: int|
            0 <= i < records.len() && (forall|j: int|
                i < j < records.len() ==> cleaned_path(#[trigger] records[j].path@)
                    != cleaned_path(records[i].path@)) ==> indexed(records)[cleaned_path(
                #[trigger] records[i].path@,
            )] == records[i].meta,
    decreases records.len(),
{
    if records.len() > 0 {
        let t = records.drop_last();
        let n = records.len() - 1;
        lemma_index_keeps_every_record(t);
        assert(records.last() == records[n]);
        assert(indexed(records) == indexed(t).insert(
            cleaned_path(records[n].path@),
            records[n].meta,
        ));
        assert forall|p: Seq<char>|
            #[trigger] indexed(records).contains_key(p) <==> exists|i: int|
                0 <= i < records.len() && cleaned_path(records[i].path@) == p by {
            if indexed(records).contains_key(p) && p != cleaned_path(records[n].path@) {
                assert(indexed(t).contains_key(p));
                let i = choose|i: int| 0 <= i < t.len() && cleaned_path(t[i].path@) == p;
                assert(records[i] == t[i]);
            }
            if exists|i: int| 0 <= i < records.len() && cleaned_path(records[i].path@) == p {
                let i = choose|i: int| 0 <= i < records.len() && cleaned_path(records[i].path@) == p;
                if i < n {
                    assert(t[i] == records[i]);
                }
            }
        }
        assert forall|i: int|
            0 <= i < records.len() && (forall|j: int|
                i < j < records.len() ==> cleaned_path(#[trigger] records[j].path@)
                    != cleaned_path(records[i].path@)) implies indexed(records)[cleaned_path(
            #[trigger] records[i].path@,
        )] == records[i].meta by {
            if i < n {
                assert(t[i] == records[i]);
                assert(cleaned_path(records[n].path@) != cleaned_path(records[i].path@));
                assert forall|j: int| i < j < t.len() implies cleaned_path(#[trigger] t[j].path@)
                    != cleaned_path(t[i].path@) by {
                    assert(t[j] == records[j]);
                }
            }
        }
    }
}

/// Indexes the files found under a directory by their cleaned relative paths.
pub fn index_files(records: &Vec<FileRecord>) -> (idx: FileIndex)
    ensures
        idx@ == indexed(records@),
        forall|p: Seq<char>|
            #[trigger] idx@.contains_key(p) <==> exists|i: int|
                0 <= i < records@.len() && cleaned_path(records@[i].path@) == p,
        forall|i: int|
            0 <= i < records@.len() && (forall|j: int|
                i < j < records@.len() ==> cleaned_path(#[trigger] records@[j].path@)
                    != cleaned_path(records@[i].path@)) ==> idx@[cleaned_path(
                #[trigger] records@[i].path@,
            )] == records@[i].meta,
{
    proof {
        lemma_index_keeps_every_record(records@);
    }
    let mut idx = FileIndex::new();
    let n = records.len();
    for i in 0..n
        invariant
            n == records@.len(),
            idx@ == indexed(records@.take(i as int)),
    {
        let path = clean_path(records[i].path.as_str());
        idx.insert(path, records[i].meta);
        assert(records@.take(i + 1).drop_last() =~= records@.take(i as int));
    }
    assert(records@.take(n as int) =~= records@);
    idx
}

/// Whether the file at `p` is to be copied from the source to the replica:
/// the source has it, and the replica lacks it or has it with another size or
/// modification time.
pub open spec fn needs_copy(
    source: Map<Seq<char>, FileMeta>,
    replica: Map<Seq<char>, FileMeta>,
    p: Seq<char>,
) -> bool {
    source.contains_key(p) && (!replica.contains_key(p) || replica[p] != source[p])
}

/// Whether the file at `p` is to be deleted from the replica: the replica has
/// it and the source does not.
pub open spec fn needs_delete(
    source: Map<Seq<char>, FileMeta>,
    replica: Map<Seq<char>, FileMeta>,
    p: Seq<char>,
) -> bool {
    replica.contains_key(p) && !source.contains_key(p)
}

/// The paths to copy.
pub open spec fn copy_set(source: Map<Seq<char>, FileMeta>, replica: Map<Seq<char>, FileMeta>) -> Set<
    Seq<char>,
> {
    Set::new(|p: Seq<char>| needs_copy(source, replica, p))
}

/// The paths to delete.
pub open spec fn delete_set(
    source: Map<Seq<char>, FileMeta>,
    replica: Map<Seq<char>, FileMeta>,
) -> Set<Seq<char>> {
    Set::new(|p: Seq<char>| needs_delete(source, replica, p))
}

/// A synchronisation plan: the relative paths to copy from the source into
/// the replica, and those to delete from the replica.
pub struct SyncPlan {
    pub to_copy: Vec<String>,
    pub to_delete: Vec<String>,
}

/// The paths of `from` to copy into `other` (when `copying`) or to delete
/// from `from` because `other` lacks them (otherwise), each listed once.
fn select_paths(
    from: &FileIndex,
    other: &FileIndex,
    copying: bool,
) -> (out: Vec<String>)
    ensures
        views(out@).no_duplicates(),
        copying ==> views(out@).to_set() == copy_set(from@, other@),
        !copying ==> views(out@).to_set() == delete_set(other@, from@),
{
    let recs = from.records();
    let ghost s = from@;
    let ghost r = other@;
    let ghost keep = |p: Seq<char>|
        if copying {
            needs_copy(s, r, p)
        } else {
            needs_delete(r, s, p)
        };
    proof {
        lemma_records_map(recs@);
    }
    let n = recs.len();
    let mut out: Vec<String> = Vec::new();
    let mut i: usize = 0;
    while i < n
        invariant
            i <= n,
            n == recs@.len(),
            records_map(recs@) == s,
            other@ == r,
            paths_distinct(recs@),
            forall|j: int| 0 <= j < n ==> s[#[trigger] recs@[j].path@] == recs@[j].meta,
            forall|j: int| 0 <= j < n ==> s.contains_key(#[trigger] recs@[j].path@),
            keep == (|p: Seq<char>|
                if copying {
                    needs_copy(s, r, p)
                } else {
                    needs_delete(r, s, p)
                }),
            forall|k: int|
                0 <= k < out@.len() ==> exists|j: int|
                    0 <= j < i && #[trigger] out@[k]@ == recs@[j].path@,
            views(out@).no_duplicates(),
            forall|j: int|
                0 <= j < i ==> (keep(#[trigger] recs@[j].path@) <==> views(out@).contains(
                    recs@[j].path@,
                )),
        decreases n - i,
    {
        let rec = &recs[i];
        let found = other.get(&rec.path);
        let wanted = if copying {
            match found {
                None => true,
                Some(m) => m != rec.meta,
            }
        } else {
            found.is_none()
        };
        assert(wanted == keep(recs@[i as int].path@));
        let ghost before = views(out@);
        if wanted {
            out.push(rec.path.clone());
            assert(views(out@) =~= before.push(recs@[i as int].path@));
            assert(!before.contains(recs@[i as int].path@)) by {
                if before.contains(recs@[i as int].path@) {
                    let k = choose|k: int| 0 <= k < before.len() && before[k] == recs@[i as int].path@;
                    let j = choose|j: int| 0 <= j < i && #[trigger] out@[k]@ == recs@[j].path@;
                    assert(recs@[j].path@ != recs@[i as int].path@);
                }
            }
            assert forall|j: int| 0 <= j < i + 1 implies (keep(#[trigger] recs@[j].path@)
                <==> views(out@).contains(recs@[j].path@)) by {
                if j < i {
                    assert(recs@[j].path@ != recs@[i as int].path@);
                    assert(views(out@).contains(recs@[j].path@) ==> before.contains(recs@[j].path@)) by {
                        if views(out@).contains(recs@[j].path@) {
                            let k = choose|k: int| 0 <= k < views(out@).len() && views(out@)[k] == recs@[j].path@;
                            if k < before.len() {
                                assert(before[k] == views(out@)[k]);
                            }
                        }
                    }
                    if before.contains(recs@[j].path@) {
                        let k = choose|k: int| 0 <= k < before.len() && before[k] == recs@[j].path@;
                        assert(views(out@)[k] == before[k]);
                    }
                } else {
                    assert(views(out@)[before.len() as int] == recs@[i as int].path@);
                }
            }
            assert forall|k: int|
                0 <= k < out@.len() implies exists|j: int|
                    0 <= j < i + 1 && #[trigger] out@[k]@ == recs@[j].path@ by {
                if k < before.len() {
                    assert(out@[k]@ == before[k]);
                } else {
                    assert(out@[k]@ == recs@[i as int].path@);
                }
            }
        } else {
            assert forall|j: int| 0 <= j < i + 1 implies (keep(#[trigger] recs@[j].path@)
                <==> views(out@).contains(recs@[j].path@)) by {
                if j == i {
                    if views(out@).contains(recs@[i as int].path@) {
                        let k = choose|k: int| 0 <= k < views(out@).len() && views(out@)[k] == recs@[i as int].path@;
                        let j2 = choose|j2: int| 0 <= j2 < i && #[trigger] out@[k]@ == recs@[j2].path@;
                        assert(recs@[j2].path@ != recs@[i as int].path@);
                    }
                }
            }
            assert forall|k: int|
                0 <= k < out@.len() implies exists|j: int|
                    0 <= j < i + 1 && #[trigger] out@[k]@ == recs@[j].path@ by {
                let j = choose|j: int| 0 <= j < i && #[trigger] out@[k]@ == recs@[j].path@;
            }
        }
        i = i + 1;
    }
    proof {
        let goal = if copying {
            copy_set(s, r)
        } else {
            delete_set(r, s)
        };
        assert(views(out@).to_set() =~= goal) by {
            assert forall|p: Seq<char>| #[trigger] views(out@).to_set().contains(p) <==> goal.contains(p) by {
                if views(out@).to_set().contains(p) {
                    let k = choose|k: int| 0 <= k < views(out@).len() && views(out@)[k] == p;
                    let j = choose|j: int| 0 <= j < n && #[trigger] out@[k]@ == recs@[j].path@;
                    assert(keep(recs@[j].path@));
                }
                if goal.contains(p) {
                    assert(s.contains_key(p));
                    let j = choose|j: int| 0 <= j < recs@.len() && recs@[j].path@ == p;
                    assert(keep(recs@[j].path@));
                }
            }
        }
    }
    out
}

/// Plans the synchronisation of `replica` with `source`: every file that the
/// replica lacks or holds with another size or modification time is to be
/// copied, and every file of the replica that the source lacks is to be
/// deleted; each path is listed once.
pub fn plan_sync(source: &FileIndex, replica: &FileIndex) -> (plan: SyncPlan)
    ensures
        views(plan.to_copy@).no_duplicates(),
        views(plan.to_copy@).to_set() == copy_set(source@, replica@),
        views(plan.to_delete@).no_duplicates(),
        views(plan.to_delete@).to_set() == delete_set(source@, replica@),
{
    let to_copy = select_paths(source, replica, true);
    let to_delete = select_paths(replica, source, false);
    SyncPlan { to_copy, to_delete }
}

/// The replica once a plan is carried out: each planned copy takes the
/// source's file, each planned deletion removes the replica's file, and the
/// rest of the replica stays.
pub open spec fn replica_after_plan(
    source: Map<Seq<char>, FileMeta>,
    replica: Map<Seq<char>, FileMeta>,
) -> Map<Seq<char>, FileMeta> {
    Map::new(
        |p: Seq<char>|
            copy_set(source, replica).contains(p) || (replica.contains_key(p) && !delete_set(
                source,
                replica,
            ).contains(p)),
        |p: Seq<char>|
            if copy_set(source, replica).contains(p) {
                source[p]
            } else {
                replica[p]
            },
    )
}

/// Carrying out the plan makes the replica hold exactly the source's files,
/// with the source's sizes and modification times.
pub proof fn lemma_plan_reaches_source(
    source: Map<Seq<char>, FileMeta>,
    replica: Map<Seq<char>, FileMeta>,
)
    ensures
        replica_after_plan(source, replica) == source,
{
    assert(replica_after_plan(source, replica) =~= source);
}

/// The plan is empty exactly when the replica already matches the source.
pub proof fn lemma_plan_empty_iff_in_sync(
    source: Map<Seq<char>, FileMeta>,
    replica: Map<Seq<char>, FileMeta>,
)
    ensures
        (copy_set(source, replica) == Set::<Seq<char>>::empty() && delete_set(source, replica)
            == Set::<Seq<char>>::empty()) <==> source == replica,
{
    if copy_set(source, replica) == Set::<Seq<char>>::empty() && delete_set(source, replica)
        == Set::<Seq<char>>::empty() {
        assert forall|p: Seq<char>| #[trigger] source.contains_key(p) implies replica.contains_key(p)
            && replica[p] == source[p] by {
            assert(!copy_set(source, replica).contains(p));
        }
        assert forall|p: Seq<char>| #[trigger] replica.contains_key(p) implies source.contains_key(p) by {
            assert(!delete_set(source, replica).contains(p));
        }
        assert(source.dom() =~= replica.dom());
        assert(source =~= replica);
    }
    if source == replica {
        assert(copy_set(source, replica) =~= Set::<Seq<char>>::empty());
        assert(delete_set(source, replica) =~= Set::<Seq<char>>::empty());
    }
}

/// No path is both copied and deleted.
pub proof fn lemma_plan_disjoint(
    source: Map<Seq<char>, FileMeta>,
    replica: Map<Seq<char>, FileMeta>,
)
    ensures
        copy_set(source, replica).disjoint(delete_set(source, replica)),
{
}

} // verus!
