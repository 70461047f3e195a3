//! One synchronization run: planning where each discovered file goes, taking
//! each staleness decision, and keeping the aggregate counters.

use vstd::prelude::*;

use crate::paths::PathError;
use crate::paths::RelativePath;
use crate::paths::SyncPath;
use crate::paths::destination_path;
use crate::paths::parent_of;
use crate::paths::rel_of;
use crate::paths::relative_path;
use crate::paths::starts_with;
use crate::stale::Mtime;
use crate::stale::needs_copy;
use crate::stale::needs_copy_spec;
use crate::stale::later_than;

verus! {

/// The inputs of one staleness decision: the source file's timestamp, and
/// the destination's where it could be read.  `None` stands for a
/// destination whose metadata could not be read, deliberately treated as
/// absent.
#[derive(Debug, Clone, Copy)]
pub struct FileCheck {
    pub src_mtime: Mtime,
    pub dest_mtime: Option<Mtime>,
}

/// The check asks for a copy.
pub open spec fn is_stale(check: FileCheck) -> bool {
    needs_copy_spec(check.src_mtime, check.dest_mtime)
}

/// How many checks of `s` ask for a copy.
pub open spec fn stale_count(s: Seq<FileCheck>) -> nat
    decreases s.len(),
{
    if s.len() == 0 {
        0
    } else {
        stale_count(s.drop_last()) + if is_stale(s.last()) {
            1nat
        } else {
            0nat
        }
    }
}

/// Where one discovered file goes: its source-relative path, the destination
/// directory that must exist before the copy, and the destination file path.
#[derive(Debug, Clone, PartialEq, Eq)]
pub struct FilePlan {
    pub rel: RelativePath,
    pub dir_to_create: SyncPath,
    pub dest: SyncPath,
}

/// The aggregate result of a run: how many files were checked and how many
/// of them were copied.
#[derive(Debug, Clone, Copy, PartialEq, Eq, Structural)]
pub struct Stats {
    pub checked: u32,
    pub copied: u32,
}

/// One synchronization run: the two roots and the aggregate counters.
#[derive(Debug)]
pub struct Syncer {
    pub source: SyncPath,
    pub destination: SyncPath,
    pub checked: u32,
    pub copied: u32,
}

impl Syncer {
    /// The counters only ever move together: never more copies than checks.
    pub open spec fn wf(&self) -> bool {
        self.copied <= self.checked
    }

    /// Begin a run over the two roots with zeroed counters.
    pub fn new(source: SyncPath, destination: SyncPath) -> (r: Syncer)
        ensures
            r.source == source,
            r.destination == destination,
            r.checked == 0,
            r.copied == 0,
            r.wf(),
    {
        Syncer { source, destination, checked: 0, copied: 0 }
    }

    /// Map one discovered entry to its destination.  Succeeds exactly when
    /// the entry lies strictly below the source root; the plan's paths are
    /// fully determined by the entry.  Either failure aborts the whole run:
    /// traversal only hands in entries found under the source root.
    pub fn plan_file(&self, entry: &SyncPath) -> (r: Result<FilePlan, PathError>)
        ensures
            match r {
                Ok(plan) => {
                    &&& starts_with(entry@, self.source@)
                    &&& entry@.len() > self.source@.len()
                    &&& plan.rel@ == rel_of(self.source@, entry@)
                    &&& plan.dir_to_create@ == self.destination@ + plan.rel@.drop_last()
                    &&& plan.dest@ == self.destination@ + plan.rel@
                },
                Err(e) => match e {
                    PathError::NotRelative => !starts_with(entry@, self.source@),
                    PathError::NoParent => starts_with(entry@, self.source@)
                        && entry@.len() == self.source@.len(),
                },
            },
    {
        let rel = match relative_path(&self.source, entry) {
            Ok(rel) => rel,
            Err(e) => {
                return Err(e);
            },
        };
        let parent = match parent_of(&rel) {
            Ok(parent) => parent,
            Err(e) => {
                return Err(e);
            },
        };
        let dir_to_create = destination_path(&self.destination, &parent);
        let dest = destination_path(&self.destination, &rel);
        Ok(FilePlan { rel, dir_to_create, dest })
    }

    /// Take one staleness decision and account for it: the file was checked,
    /// and it is copied exactly when the rule asks for it.
    pub fn check_file(&mut self, check: FileCheck) -> (copy_needed: bool)
        requires
            old(self).wf(),
            old(self).checked < u32::MAX,
        ensures
            copy_needed == is_stale(check),
            final(self).checked == old(self).checked + 1,
            final(self).copied == old(self).copied + (if copy_needed {
                1int
            } else {
                0int
            }),
            final(self).source == old(self).source,
            final(self).destination == old(self).destination,
            final(self).wf(),
    {
        let copy_needed = needs_copy(check.src_mtime, check.dest_mtime);
        self.checked = self.checked + 1;
        if copy_needed {
            self.copied = self.copied + 1;
        }
        copy_needed
    }

    /// Account for a whole sequence of staleness decisions: every file is
    /// checked, and exactly the stale ones are copied.
    pub fn check_files(&mut self, checks: &Vec<FileCheck>)
        requires
            old(self).wf(),
            old(self).checked + checks@.len() <= u32::MAX,
        ensures
            final(self).checked == old(self).checked + checks@.len(),
            final(self).copied == old(self).copied + stale_count(checks@),
            final(self).source == old(self).source,
            final(self).destination == old(self).destination,
            final(self).wf(),
    {
        let n: usize = checks.len();
        let mut k: usize = 0;
        while k < n
            invariant
                0 <= k <= n,
                n == checks@.len(),
                self.wf(),
                old(self).checked + n <= u32::MAX,
                self.checked == old(self).checked + k,
                self.copied == old(self).copied + stale_count(checks@.take(k as int)),
                self.source == old(self).source,
                self.destination == old(self).destination,
            decreases n - k,
        {
            let check = checks[k];
            proof {
                assert(checks@.take(k + 1).drop_last() =~= checks@.take(k as int));
                assert(checks@.take(k + 1).last() == checks@[k as int]);
            }
            let _ = self.check_file(check);
            k = k + 1;
        }
        proof {
            assert(checks@.take(n as int) =~= checks@);
        }
    }

    /// The run's aggregate counters so far.
    pub fn stats(&self) -> (r: Stats)
        ensures
            r.checked == self.checked,
            r.copied == self.copied,
    {
        Stats { checked: self.checked, copied: self.copied }
    }

    /// The summary value: how many checked files were already up to date.
    pub fn up_to_date(&self) -> (r: u32)
        requires
            self.wf(),
        ensures
            r == self.checked - self.copied,
    {
        self.checked - self.copied
    }
}

/// Every check of `s` found no destination timestamp.
pub open spec fn all_dest_absent(s: Seq<FileCheck>) -> bool {
    forall|i: int| 0 <= i < s.len() ==> s[i].dest_mtime is None
}

/// The destination timestamp is present and not older than the source's.
pub open spec fn dest_up_to_date(check: FileCheck) -> bool {
    match check.dest_mtime {
        None => false,
        Some(d) => !later_than(check.src_mtime, d),
    }
}

/// Every check of `s` found an up-to-date destination.
pub open spec fn all_up_to_date(s: Seq<FileCheck>) -> bool {
    forall|i: int| 0 <= i < s.len() ==> dest_up_to_date(s[i])
}

proof fn lemma_none_stale(s: Seq<FileCheck>)
    requires
        forall|i: int| 0 <= i < s.len() ==> !is_stale(s[i]),
    ensures
        stale_count(s) == 0,
    decreases s.len(),
{
    if s.len() > 0 {
        assert forall|i: int| 0 <= i < s.drop_last().len() implies !is_stale(
            s.drop_last()[i],
        ) by {
            assert(s.drop_last()[i] == s[i]);
        }
        lemma_none_stale(s.drop_last());
        assert(!is_stale(s.last()));
    }
}

/// First-run law: against a destination that holds no readable counterpart
/// for any file, every check asks for a copy, so a full run copies exactly
/// as many files as it checks.
pub proof fn lemma_fresh_destination_copies_all(s: Seq<FileCheck>)
    requires
        all_dest_absent(s),
    ensures
        stale_count(s) == s.len(),
    decreases s.len(),
{
    if s.len() > 0 {
        assert forall|i: int| 0 <= i < s.drop_last().len() implies s.drop_last()[i].dest_mtime
            is None by {
            assert(s.drop_last()[i] == s[i]);
        }
        lemma_fresh_destination_copies_all(s.drop_last());
        assert(s.last().dest_mtime is None);
        assert(is_stale(s.last()));
    }
}

/// Second-run law: when every destination timestamp is present and at least
/// its source's, no check asks for a copy, so a repeated run copies nothing
/// while still checking every file.
pub proof fn lemma_up_to_date_destination_copies_none(s: Seq<FileCheck>)
    requires
        all_up_to_date(s),
    ensures
        stale_count(s) == 0,
{
    assert forall|i: int| 0 <= i < s.len() implies !is_stale(s[i]) by {
        assert(dest_up_to_date(s[i]));
    }
    lemma_none_stale(s);
}

/// Touched-file law: when exactly one check asks for a copy, exactly one
/// file is copied.
pub proof fn lemma_single_stale_copies_one(s: Seq<FileCheck>, k: int)
    requires
        0 <= k < s.len(),
        is_stale(s[k]),
        forall|i: int| 0 <= i < s.len() && i != k ==> !is_stale(s[i]),
    ensures
        stale_count(s) == 1,
    decreases s.len(),
{
    if k == s.len() - 1 {
        assert forall|i: int| 0 <= i < s.drop_last().len() implies !is_stale(
            s.drop_last()[i],
        ) by {
            assert(s.drop_last()[i] == s[i]);
        }
        lemma_none_stale(s.drop_last());
        assert(is_stale(s.last()));
    } else {
        assert forall|i: int| 0 <= i < s.drop_last().len() && i != k implies !is_stale(
            s.drop_last()[i],
        ) by {
            assert(s.drop_last()[i] == s[i]);
        }
        assert(s.drop_last()[k] == s[k]);
        lemma_single_stale_copies_one(s.drop_last(), k);
        assert(!is_stale(s.last()));
    }
}

/// First-run law at the session level: a run begun with zeroed counters
/// that finds no destination counterpart for any checked file ends with
/// every checked file copied.  The counters are as `check_files` leaves
/// them for a fresh `Syncer`.
pub proof fn lemma_first_run_copies_everything(after: Syncer, checks: Seq<FileCheck>)
    requires
        all_dest_absent(checks),
        after.checked == checks.len(),
        after.copied == stale_count(checks),
    ensures
        after.copied == after.checked,
{
    lemma_fresh_destination_copies_all(checks);
}

/// Second-run law at the session level: a run begun with zeroed counters
/// that finds every destination up to date still checks every file but
/// copies none.
pub proof fn lemma_second_run_copies_nothing(after: Syncer, checks: Seq<FileCheck>)
    requires
        all_up_to_date(checks),
        after.checked == checks.len(),
        after.copied == stale_count(checks),
    ensures
        after.checked == checks.len(),
        after.copied == 0,
{
    lemma_up_to_date_destination_copies_none(checks);
}

/// Touched-file law at the session level: when exactly one checked file is
/// stale, a run begun with zeroed counters copies exactly that one file.
pub proof fn lemma_touch_one_copies_one(after: Syncer, checks: Seq<FileCheck>, k: int)
    requires
        0 <= k < checks.len(),
        is_stale(checks[k]),
        forall|i: int| 0 <= i < checks.len() && i != k ==> !is_stale(checks[i]),
        after.checked == checks.len(),
        after.copied == stale_count(checks),
    ensures
        after.copied == 1,
{
    lemma_single_stale_copies_one(checks, k);
}

/// Orphan law: the mapping from source entries to destination paths is
/// injective, and a planned copy writes only the mapped path of its entry.
/// A destination file whose path is not the image of any walked entry is
/// therefore never written (and the engine has no delete operation at all).
pub proof fn lemma_mapping_injective(
    root: Seq<Seq<char>>,
    dest_root: Seq<Seq<char>>,
    a: Seq<Seq<char>>,
    b: Seq<Seq<char>>,
)
    requires
        starts_with(a, root),
        starts_with(b, root),
        a != b,
    ensures
        dest_root + rel_of(root, a) != dest_root + rel_of(root, b),
{
    crate::paths::lemma_relative_path_round_trip(root, a);
    crate::paths::lemma_relative_path_round_trip(root, b);
    if dest_root + rel_of(root, a) == dest_root + rel_of(root, b) {
        let ra = rel_of(root, a);
        let rb = rel_of(root, b);
        assert((dest_root + ra).len() == dest_root.len() + ra.len());
        assert((dest_root + rb).len() == dest_root.len() + rb.len());
        assert(ra.len() == rb.len());
        assert forall|i: int| 0 <= i < ra.len() implies ra[i] == rb[i] by {
            assert((dest_root + ra)[dest_root.len() + i] == ra[i]);
            assert((dest_root + rb)[dest_root.len() + i] == rb[i]);
        }
        assert(ra =~= rb);
        assert(a == root + ra && b == root + rb);
        assert(false);
    }
}

} // verus!

